//! Fresh identifiers for sessions and rooms.

use uuid::Uuid;
use vstd::prelude::*;

verus! {

/// `c` is a decimal digit or one of the letters `a` to `f`.
pub open spec fn is_lower_hex(c: char) -> bool {
    ('0' <= c && c <= '9') || ('a' <= c && c <= 'f')
}

/// `s` has the shape of a random UUID written in lower case with hyphens,
/// such as `67e55044-10b1-426f-9247-bb680e5fe0c8`: five groups of 8, 4, 4, 4
/// and 12 hexadecimal digits, the third starting with the version digit `4`
/// and the fourth with one of `8`, `9`, `a`, `b`.
pub open spec fn is_id_text(s: Seq<char>) -> bool {
    &&& s.len() == 36
    &&& forall|i: int|
        0 <= i < 36 ==> if i == 8 || i == 13 || i == 18 || i == 23 {
            s[i] == '-'
        } else {
            is_lower_hex(#[trigger] s[i])
        }
    &&& s[14] == '4'
    &&& (s[19] == '8' || s[19] == '9' || s[19] == 'a' || s[19] == 'b')
}

/// Draws a random identifier: `uuid::Uuid::new_v4`, written out by the
/// `to_string` of `Uuid`.
///
/// Trusted, not proved: the text has the hyphenated lower-case shape, with
/// the version and variant digits that `new_v4` sets. Nothing is claimed of
/// which identifier comes out; two calls may even give the same one.
/// `new_v4` panics where the operating system cannot supply random bytes.
#[verifier::external_body]
pub(crate) fn new_id() -> (id: String)
    ensures
        is_id_text(id@),
{
    Uuid::new_v4().to_string()
}

} // verus!
