//! Random identifiers.

use vstd::prelude::*;

verus! {

/// A lower case hexadecimal digit.
pub open spec fn is_lower_hex(c: char) -> bool {
    ('0' <= c <= '9') || ('a' <= c <= 'f')
}

/// The hyphenated form of a UUID: 8, 4, 4, 4 and 12 digits.
pub open spec fn is_uuid(s: Seq<char>) -> bool {
    &&& s.len() == 36
    &&& forall|i: int|
        0 <= i < 36 ==> if i == 8 || i == 13 || i == 18 || i == 23 {
            (#[trigger] s[i]) == '-'
        } else {
            is_lower_hex(s[i])
        }
}

/// The simple form of a UUID: 32 digits.
pub open spec fn is_simple_uuid(s: Seq<char>) -> bool {
    &&& s.len() == 32
    &&& forall|i: int| 0 <= i < 32 ==> is_lower_hex(#[trigger] s[i])
}

/// `uuid::Uuid::new_v4` and the `Display` form of what it returns, which is the
/// hyphenated form in lower case. Which identifier comes back is left to chance.
#[verifier::external_body]
pub(crate) fn new_uuid() -> (r: String)
    ensures
        is_uuid(r@),
{
    uuid::Uuid::new_v4().to_string()
}

/// A new identifier for a row.
pub fn fresh_id() -> (r: String)
    ensures
        is_uuid(r@),
{
    new_uuid()
}

/// `uuid::Uuid::simple` on a fresh random identifier: its digits in lower case,
/// without hyphens. Which identifier comes back is left to chance.
#[verifier::external_body]
pub(crate) fn new_simple_uuid() -> (r: String)
    ensures
        is_simple_uuid(r@),
{
    uuid::Uuid::new_v4().simple().to_string()
}

} // verus!
