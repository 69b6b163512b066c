use vstd::prelude::*;

verus! {

/// Whether `s` has the shape of a hyphenated UUID: 36 characters with
/// hyphens at positions 8, 13, 18 and 23.
pub open spec fn is_hyphenated_uuid(s: Seq<char>) -> bool {
    &&& s.len() == 36
    &&& s[8] == '-'
    &&& s[13] == '-'
    &&& s[18] == '-'
    &&& s[23] == '-'
}

/// Calls `uuid::Uuid::new_v4` and renders it with `to_string`. The value is
/// random, so only its hyphenated shape is stated.
#[verifier::external_body]
pub fn new_unique_id() -> (id: String)
    ensures
        is_hyphenated_uuid(id@),
{
    uuid::Uuid::new_v4().to_string()
}

} // verus!
