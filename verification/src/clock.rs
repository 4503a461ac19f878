//! Sources of time and randomness used when stamping and naming blocks.

use vstd::prelude::*;

verus! {

/// Milliseconds since the Unix epoch, read from the system clock
/// (`std::time::SystemTime::now`). Nothing is claimed of the value: it
/// depends on the clock; a clock set before the epoch reads as 0.
#[verifier::external_body]
pub(crate) fn unix_millis() -> (ms: u128) {
    std::time::SystemTime::now().duration_since(std::time::UNIX_EPOCH).map(|d| d.as_millis()).unwrap_or(0)
}

/// A random 64-bit value from `rand::random::<u64>()`. Nothing is claimed of
/// the value: it is drawn from the thread-local generator.
#[verifier::external_body]
pub(crate) fn random_u64() -> (r: u64) {
    rand::random::<u64>()
}

/// Whole seconds since the Unix epoch, read from the system clock
/// (`std::time::SystemTime::now`). Nothing is claimed of the value: it
/// depends on the clock; a clock set before the epoch reads as 0.
#[verifier::external_body]
pub(crate) fn unix_seconds() -> (s: u64) {
    std::time::SystemTime::now().duration_since(std::time::UNIX_EPOCH).map(|d| d.as_secs()).unwrap_or(0)
}

/// The current UTC time in whole seconds since the Unix epoch, from
/// `chrono::Utc::now().timestamp()`. Nothing is claimed of the value: it
/// depends on the clock.
#[verifier::external_body]
pub(crate) fn utc_now_timestamp() -> (t: i64) {
    chrono::Utc::now().timestamp()
}

/// The current UTC time in milliseconds since the Unix epoch, from
/// `chrono::Utc::now().timestamp_millis()`. Nothing is claimed of the
/// value: it depends on the clock.
#[verifier::external_body]
pub(crate) fn utc_now_millis() -> (t: i64) {
    chrono::Utc::now().timestamp_millis()
}

/// The current UTC time formatted by chrono as `%Y%m%d_%H%M%S`
/// (`chrono::Utc::now().format(..)`). Nothing is claimed of the text: it
/// depends on the clock.
#[verifier::external_body]
pub(crate) fn utc_now_compact() -> (s: String) {
    chrono::Utc::now().format("%Y%m%d_%H%M%S").to_string()
}

/// A lower-case hexadecimal digit.
pub open spec fn is_lower_hex(c: char) -> bool {
    ('0' <= c && c <= '9') || ('a' <= c && c <= 'f')
}

/// The hyphenated text form of a UUID: 36 characters, hyphens at positions
/// 8, 13, 18 and 23, lower-case hexadecimal digits elsewhere.
pub open spec fn is_hyphenated_uuid(s: Seq<char>) -> bool {
    &&& s.len() == 36
    &&& forall|i: int|
        0 <= i < 36 ==> if i == 8 || i == 13 || i == 18 || i == 23 {
            #[trigger] s[i] == '-'
        } else {
            is_lower_hex(s[i])
        }
}

/// A fresh random UUID (`uuid::Uuid::new_v4`) in its display form, which
/// `uuid`'s `Display` writes hyphenated in lower case. Only the shape of
/// the text is claimed; the value is random.
#[verifier::external_body]
pub(crate) fn new_uuid_text() -> (s: String)
    ensures
        is_hyphenated_uuid(s@),
{
    uuid::Uuid::new_v4().to_string()
}

} // verus!
