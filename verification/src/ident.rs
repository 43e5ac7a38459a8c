//! Fresh identifiers for new tasks.
//!
//! An identifier is the textual form of a random (version 4) UUID. The store
//! treats it as an opaque string; what is stated here is only the shape that
//! every such string has.

use vstd::prelude::*;

verus! {

/// Whether `c` is one of the sixteen lower-case hexadecimal digits.
pub open spec fn is_lower_hex(c: char) -> bool {
    ('0' <= c && c <= '9') || ('a' <= c && c <= 'f')
}

/// Whether position `i` of a hyphenated UUID holds a hyphen.
pub open spec fn is_hyphen_position(i: int) -> bool {
    i == 8 || i == 13 || i == 18 || i == 23
}

/// Whether `c` may stand at position `i` of a hyphenated lower-case UUID.
pub open spec fn is_uuid_char_at(i: int, c: char) -> bool {
    if is_hyphen_position(i) {
        c == '-'
    } else {
        is_lower_hex(c)
    }
}

/// The shape of a version 4 UUID in hyphenated lower-case form, such as
/// `67e55044-10b1-426f-9247-bb680e5fe0c8`: 36 characters, hyphens after the
/// 8th, 12th, 16th and 20th hexadecimal digit, the version digit `4` at the
/// start of the third group, and one of `8`, `9`, `a`, `b` (the variant) at
/// the start of the fourth.
pub open spec fn is_uuid_v4_text(s: Seq<char>) -> bool {
    &&& s.len() == 36
    &&& forall|i: int| 0 <= i < 36 ==> is_uuid_char_at(i, #[trigger] s[i])
    &&& s[14] == '4'
    &&& (s[19] == '8' || s[19] == '9' || s[19] == 'a' || s[19] == 'b')
}

/// Draws a new random identifier.
///
/// Trusted: the body calls `uuid::Uuid::new_v4` and renders the result with
/// the `Display` impl of `uuid::Uuid`. The contract claims only what holds of
/// every value that call can return: `new_v4` fixes the version and variant
/// bits of 128 random bits, and `Display` writes the hyphenated lower-case
/// form. Which identifier comes back is not determined, and nothing is
/// claimed about it differing from any identifier drawn before.
///
/// `new_v4` panics if the operating system cannot supply random bytes.
#[verifier::external_body]
pub(crate) fn fresh_id() -> (id: String)
    ensures
        is_uuid_v4_text(id@),
{
    uuid::Uuid::new_v4().to_string()
}

} // verus!
