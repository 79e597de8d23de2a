//! Fresh identifiers and the current time, which only the outside world
//! can supply.

use vstd::prelude::*;

verus! {

/// A lowercase hexadecimal digit.
pub open spec fn lower_hex(c: char) -> bool {
    ('0' <= c && c <= '9') || ('a' <= c && c <= 'f')
}

/// The hyphenated text of a version-4 UUID: 36 characters, `-` at 8, 13,
/// 18 and 23, lowercase hex digits elsewhere, and the version digit `4` at
/// 14.
pub open spec fn hyphenated_uuid(s: Seq<char>) -> bool {
    &&& s.len() == 36
    &&& forall|i: int|
        0 <= i < 36 ==> if i == 8 || i == 13 || i == 18 || i == 23 {
            #[trigger] s[i] == '-'
        } else {
            lower_hex(s[i])
        }
    &&& s[14] == '4'
}

/// The simple text of a UUID: 32 lowercase hex digits.
pub open spec fn simple_uuid(s: Seq<char>) -> bool {
    s.len() == 32 && forall|i: int| 0 <= i < 32 ==> lower_hex(#[trigger] s[i])
}

/// A fresh config id.
///
/// Calls `uuid::Uuid::new_v4` and renders it with `to_string`, which writes
/// the hyphenated lowercase form; `new_v4` sets the version digit to 4.
/// The other digits are random: that the id differs from every other id
/// is not stated.
#[verifier::external_body]
pub(crate) fn new_id() -> (r: String)
    ensures
        hyphenated_uuid(r@),
{
    uuid::Uuid::new_v4().to_string()
}

/// Calls `uuid::Uuid::new_v4().simple()` and renders it with `to_string`:
/// 32 lowercase hex digits, random.
#[verifier::external_body]
pub(crate) fn new_simple_uuid() -> (r: String)
    ensures
        simple_uuid(r@),
{
    uuid::Uuid::new_v4().simple().to_string()
}

/// Milliseconds since the Unix epoch.
///
/// Calls `chrono::Utc::now` and `timestamp_millis`. The clock can read
/// anything, so nothing is stated of the value.
#[verifier::external_body]
pub(crate) fn now_ms() -> (r: i64) {
    chrono::Utc::now().timestamp_millis()
}

} // verus!
