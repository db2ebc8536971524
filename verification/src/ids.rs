//! Random identifiers.

use vstd::prelude::*;

verus! {

/// A lower-case hexadecimal digit.
pub open spec fn is_lower_hex_digit(c: char) -> bool {
    ('0' <= c && c <= '9') || ('a' <= c && c <= 'f')
}

/// The hyphenated form of a random UUID: groups of 8, 4, 4, 4 and 12 digits, version 4 and variant 1.
pub open spec fn is_uuid_text(s: Seq<char>) -> bool {
    &&& s.len() == 36
    &&& s[14] == '4'
    &&& s[19] == '8' || s[19] == '9' || s[19] == 'a' || s[19] == 'b'
    &&& forall|i: int|
        0 <= i < 36 ==> if i == 8 || i == 13 || i == 18 || i == 23 {
            (#[trigger] s[i]) == '-'
        } else {
            is_lower_hex_digit(s[i])
        }
}

/// [`uuid::Uuid::new_v4`] written by its `Display`: some version 4 UUID in hyphenated lower-case
/// form. Which one is left open, and nothing is claimed of two calls.
#[verifier::external_body]
pub(crate) fn fresh_uuid() -> (text: String)
    ensures
        is_uuid_text(text@),
{
    uuid::Uuid::new_v4().to_string()
}

/// [`rand::random`] of a 64-bit number: any number can come.
#[verifier::external_body]
pub(crate) fn random_u64() -> u64 {
    rand::random::<u64>()
}

} // verus!
