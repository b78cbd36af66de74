//! Order ids: what one looks like, and where a new one comes from.

use vstd::prelude::*;

verus! {

/// One of the digits `0` to `9` and `a` to `f`.
pub open spec fn is_lower_hex(c: char) -> bool {
    ('0' <= c && c <= '9') || ('a' <= c && c <= 'f')
}

/// The text of a random (version 4) UUID in its usual form: 32 lower-case
/// hexadecimal digits in groups of 8, 4, 4, 4 and 12 with a hyphen between
/// the groups, the third group starting with `4` and the fourth with one of
/// `8`, `9`, `a`, `b`.
pub open spec fn is_order_id(text: Seq<char>) -> bool {
    &&& text.len() == 36
    &&& forall|i: int|
        0 <= i < 36 ==> if i == 8 || i == 13 || i == 18 || i == 23 {
            #[trigger] text[i] == '-'
        } else {
            is_lower_hex(text[i])
        }
    &&& text[14] == '4'
    &&& (text[19] == '8' || text[19] == '9' || text[19] == 'a' || text[19] == 'b')
}

/// A new order id: `uuid::Uuid::new_v4`, written out by the `to_string` that
/// its `Display` gives it.
///
/// The UUID is drawn from the operating system's random numbers, so nothing
/// is claimed of which id comes back, nor that it differs from an earlier
/// one: only the shape of the text, which `new_v4` fixes by setting the
/// version and variant bits and `Display` by writing the hyphenated
/// lower-case form. `new_v4` panics where the operating system cannot supply
/// random bytes.
#[verifier::external_body]
pub(crate) fn fresh_order_id() -> (id: String)
    ensures
        is_order_id(id@),
{
    uuid::Uuid::new_v4().to_string()
}

} // verus!
