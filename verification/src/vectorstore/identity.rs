//! Identities of stored rows.

use vstd::prelude::*;

verus! {

/// A digit or a letter from `a` to `f`.
pub open spec fn hex_digit(c: char) -> bool {
    ('0' <= c && c <= '9') || ('a' <= c && c <= 'f')
}

/// Whether `i` is one of the four places where an identity has a hyphen.
pub open spec fn hyphen_at(i: int) -> bool {
    i == 8 || i == 13 || i == 18 || i == 23
}

/// The shape of a random identity: 32 lower-case hex digits in groups of
/// 8, 4, 4, 4 and 12 with hyphens between them, the third group starting
/// with the version `4` and the fourth with the variant `8`, `9`, `a` or `b`.
pub open spec fn is_identity(s: Seq<char>) -> bool {
    &&& s.len() == 36
    &&& forall|i: int| 0 <= i < 36 && hyphen_at(i) ==> #[trigger] s[i] == '-'
    &&& forall|i: int| 0 <= i < 36 && !hyphen_at(i) ==> hex_digit(#[trigger] s[i])
    &&& s[14] == '4'
    &&& (s[19] == '8' || s[19] == '9' || s[19] == 'a' || s[19] == 'b')
}

/// A new random identity, from `uuid::Uuid::new_v4` and its `to_string`.
///
/// Believed of the outside code: the text has the shape that `is_identity`
/// describes. Nothing is claimed of which identity comes back, nor that two
/// calls differ. The outside code panics where the operating system has
/// no random bytes to give.
#[verifier::external_body]
pub(crate) fn fresh_identity() -> (id: String)
    ensures
        is_identity(id@),
{
    uuid::Uuid::new_v4().to_string()
}

} // verus!
