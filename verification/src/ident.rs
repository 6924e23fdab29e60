//! Identifiers: what the text of one looks like, and where new ones come from.

use vstd::prelude::*;

verus! {

/// The length of an identifier's text.
pub const ID_LEN: usize = 36;

/// A digit or one of the letters `a` to `f`.
pub open spec fn is_lower_hex(c: char) -> bool {
    ('0' <= c && c <= '9') || ('a' <= c && c <= 'f')
}

/// The four places of an identifier's text that hold a hyphen.
pub open spec fn is_hyphen_place(i: int) -> bool {
    i == 8 || i == 13 || i == 18 || i == 23
}

/// The text of a random (version 4) UUID in its usual lower-case form,
/// `xxxxxxxx-xxxx-4xxx-yxxx-xxxxxxxxxxxx`: five groups of hexadecimal digits
/// with hyphens between them, the third group starting with `4` and the
/// fourth with one of `8`, `9`, `a`, `b`.
pub open spec fn is_random_uuid_text(text: Seq<char>) -> bool {
    &&& text.len() == ID_LEN
    &&& forall|i: int|
        #![trigger text[i]]
        0 <= i < text.len() ==> if is_hyphen_place(i) {
            text[i] == '-'
        } else {
            is_lower_hex(text[i])
        }
    &&& text[14] == '4'
    &&& (text[19] == '8' || text[19] == '9' || text[19] == 'a' || text[19] == 'b')
}

/// A new identifier, from the operating system's source of randomness.
///
/// Not verified: the body calls `uuid::Uuid::new_v4` and renders the result
/// with the crate's `Display`. The contract claims only what holds of every
/// such value: `new_v4` fixes the version and variant bits of 128 random
/// bits, and `Display` writes them as 32 lower-case hexadecimal digits in
/// groups of 8, 4, 4, 4 and 12 with hyphens between. Nothing is claimed
/// about which identifier comes, nor that two calls give different ones.
/// The call panics if the operating system cannot supply random bytes.
#[verifier::external_body]
pub(crate) fn fresh_id() -> (id: String)
    ensures
        is_random_uuid_text(id@),
{
    uuid::Uuid::new_v4().to_string()
}

} // verus!
