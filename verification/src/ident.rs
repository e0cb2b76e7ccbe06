//! Public identifier sampling, trusted at the boundary to the `uuid` crate.

use vstd::prelude::*;

verus! {

/// An uppercase hexadecimal digit: `0`..`9` or `A`..`F`.
pub open spec fn is_upper_hex(c: char) -> bool {
    (48 <= c as int && c as int <= 57) || (65 <= c as int && c as int <= 70)
}

/// A well-formed public identifier: `NIM-` followed by six uppercase
/// hexadecimal characters.
pub open spec fn is_public_id(s: Seq<char>) -> bool {
    &&& s.len() == 10
    &&& s.subrange(0, 4) == "NIM-"@
    &&& forall|i: int| 4 <= i < 10 ==> is_upper_hex(#[trigger] s[i])
}

/// Relies on `uuid::Uuid::new_v4` and its hyphenated `Display` form: 36
/// characters whose first eight are lowercase hexadecimal digits, so the
/// first six of the uppercased string are uppercase hexadecimal. The digits
/// are random, so only their shape is stated.
#[verifier::external_body]
pub(crate) fn random_id_suffix() -> (r: String)
    ensures
        r@.len() == 6,
        forall|i: int| 0 <= i < 6 ==> is_upper_hex(#[trigger] r@[i]),
{
    let mut s = uuid::Uuid::new_v4().to_string().to_uppercase();
    s.truncate(6);
    s
}

} // verus!
